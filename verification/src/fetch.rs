//! The retrying fetch client, as a state machine over attempt outcomes.
//! The caller performs one GET per attempt and classifies what came back;
//! the session decides, for every classification, whether to retry, to
//! succeed, or to fail terminally. Transport and status failures consume
//! an attempt and are retried at a constant rate; a body that fails
//! structural decode is terminal and not retried; a decoded body succeeds
//! immediately. An empty proxy pool is terminal before any attempt.

use vstd::prelude::*;

use crate::CustomError;

verus! {

/// How one HTTP attempt ended, as classified by the caller.
#[derive(Debug, Clone, Copy, PartialEq, Eq)]
pub enum AttemptOutcome {
    /// Transport or network failure, timeouts included; retried.
    Transport,
    /// A response with a non-2xx status; retried.
    BadStatus,
    /// A 2xx response whose body failed structural decode; terminal.
    DecodeFailed,
    /// A 2xx response with a decodable body; terminal success.
    Decoded,
}

/// What the session tells the caller after recording one attempt.
#[derive(Debug, Clone, PartialEq, Eq)]
pub enum FetchStatus {
    /// Attempts remain; select a proxy and try again.
    Continue,
    /// The body decoded; the fetch is done.
    Success,
    /// The fetch is over with this error.
    Failed(CustomError),
}

/// How a whole fetch ends.
#[derive(Debug, Clone, PartialEq, Eq)]
pub enum FetchResult {
    /// Some attempt returned a decodable body.
    Success,
    /// The fetch ended with this error.
    Failure(CustomError),
    /// The outcome trace ran out before the fetch reached a terminal
    /// state.
    Incomplete,
}

/// The status after an attempt, given how many attempts are now consumed
/// out of how many are allowed.
pub open spec fn spec_step(attempts_after: int, max_attempts: int, outcome: AttemptOutcome)
    -> FetchStatus {
    match outcome {
        AttemptOutcome::Decoded => FetchStatus::Success,
        AttemptOutcome::DecodeFailed => FetchStatus::Failed(CustomError::DecodeError),
        _ => if attempts_after >= max_attempts {
            FetchStatus::Failed(CustomError::FailedToFetchAfterRetries)
        } else {
            FetchStatus::Continue
        },
    }
}

/// One logical fetch in progress: how many attempts are allowed and how
/// many are consumed.
#[derive(Debug, Clone, PartialEq, Eq)]
pub struct FetchSession {
    pub max_attempts: u32,
    pub attempts: u32,
}

impl FetchSession {
    /// Attempts consumed never exceed attempts allowed.
    pub open spec fn wf(&self) -> bool {
        self.attempts <= self.max_attempts
    }

    /// A fresh fetch with no attempt consumed.
    pub fn new(max_attempts: u32) -> (r: FetchSession)
        ensures
            r.wf(),
            r.max_attempts == max_attempts,
            r.attempts == 0,
    {
        FetchSession { max_attempts, attempts: 0 }
    }

    /// Whether another attempt may be made.
    pub fn can_attempt(&self) -> (r: bool)
        ensures
            r == (self.attempts < self.max_attempts),
    {
        self.attempts < self.max_attempts
    }

    /// Records the outcome of one attempt: consumes it and decides whether
    /// to retry, to succeed, or to end the fetch with an error.
    pub fn record(&mut self, outcome: AttemptOutcome) -> (r: FetchStatus)
        requires
            old(self).wf(),
            old(self).attempts < old(self).max_attempts,
        ensures
            final(self).wf(),
            final(self).max_attempts == old(self).max_attempts,
            final(self).attempts == old(self).attempts + 1,
            r == spec_step(
                old(self).attempts + 1,
                old(self).max_attempts as int,
                outcome,
            ),
    {
        self.attempts = self.attempts + 1;
        match outcome {
            AttemptOutcome::Decoded => FetchStatus::Success,
            AttemptOutcome::DecodeFailed => FetchStatus::Failed(CustomError::DecodeError),
            _ => {
                if self.attempts >= self.max_attempts {
                    FetchStatus::Failed(CustomError::FailedToFetchAfterRetries)
                } else {
                    FetchStatus::Continue
                }
            },
        }
    }
}

/// How a fetch over this outcome trace ends: an empty pool is terminal at
/// once, a decoded body succeeds, a decode failure is terminal, and each
/// transport or status failure consumes one of the allowed attempts.
pub open spec fn spec_fetch_result(
    pool_len: int,
    max_attempts: int,
    outcomes: Seq<AttemptOutcome>,
) -> FetchResult
    decreases outcomes.len(),
{
    if pool_len <= 0 {
        FetchResult::Failure(CustomError::NoProxiesAvailable)
    } else if max_attempts <= 0 {
        FetchResult::Failure(CustomError::FailedToFetchAfterRetries)
    } else if outcomes.len() == 0 {
        FetchResult::Incomplete
    } else {
        match outcomes[0] {
            AttemptOutcome::Decoded => FetchResult::Success,
            AttemptOutcome::DecodeFailed => FetchResult::Failure(CustomError::DecodeError),
            _ => if max_attempts == 1 {
                FetchResult::Failure(CustomError::FailedToFetchAfterRetries)
            } else {
                spec_fetch_result(pool_len, max_attempts - 1, outcomes.drop_first())
            },
        }
    }
}

/// How many attempts that fetch makes.
pub open spec fn spec_attempts_made(
    pool_len: int,
    max_attempts: int,
    outcomes: Seq<AttemptOutcome>,
) -> int
    decreases outcomes.len(),
{
    if pool_len <= 0 || max_attempts <= 0 || outcomes.len() == 0 {
        0
    } else {
        match outcomes[0] {
            AttemptOutcome::Decoded => 1,
            AttemptOutcome::DecodeFailed => 1,
            _ => if max_attempts == 1 {
                1
            } else {
                1 + spec_attempts_made(pool_len, max_attempts - 1, outcomes.drop_first())
            },
        }
    }
}

/// Runs one logical fetch against a trace of attempt outcomes: with an
/// empty pool it fails at once without consuming an attempt; otherwise it
/// consumes outcomes one attempt at a time until a terminal state or the
/// end of the trace. Returns how the fetch ended and how many attempts it
/// made.
pub fn run_fetch(pool_len: usize, max_attempts: u32, outcomes: &Vec<AttemptOutcome>) -> (r: (
    FetchResult,
    u32,
))
    requires
        outcomes@.len() <= u32::MAX,
    ensures
        r.0 == spec_fetch_result(pool_len as int, max_attempts as int, outcomes@),
        r.1 == spec_attempts_made(pool_len as int, max_attempts as int, outcomes@),
{
    if pool_len == 0 {
        return (FetchResult::Failure(CustomError::NoProxiesAvailable), 0);
    }
    if max_attempts == 0 {
        return (FetchResult::Failure(CustomError::FailedToFetchAfterRetries), 0);
    }
    let mut session = FetchSession::new(max_attempts);
    let mut i: usize = 0;
    proof {
        assert(outcomes@.skip(0) =~= outcomes@);
    }
    while i < outcomes.len()
        invariant
            pool_len > 0,
            max_attempts > 0,
            outcomes@.len() <= u32::MAX,
            i <= outcomes.len(),
            session.max_attempts == max_attempts,
            session.attempts == i,
            session.attempts < session.max_attempts,
            spec_fetch_result(pool_len as int, max_attempts as int, outcomes@)
                == spec_fetch_result(
                pool_len as int,
                max_attempts - session.attempts,
                outcomes@.skip(i as int),
            ),
            spec_attempts_made(pool_len as int, max_attempts as int, outcomes@) == i
                + spec_attempts_made(
                pool_len as int,
                max_attempts - session.attempts,
                outcomes@.skip(i as int),
            ),
        decreases outcomes.len() - i,
    {
        let outcome = outcomes[i];
        proof {
            assert(outcomes@.skip(i as int)[0] == outcomes@[i as int]);
            assert(outcomes@.skip(i as int).drop_first() =~= outcomes@.skip(i + 1 as int));
        }
        let status = session.record(outcome);
        i = i + 1;
        match status {
            FetchStatus::Continue => {},
            FetchStatus::Success => {
                return (FetchResult::Success, session.attempts);
            },
            FetchStatus::Failed(e) => {
                return (FetchResult::Failure(e), session.attempts);
            },
        }
    }
    (FetchResult::Incomplete, session.attempts)
}

/// Law: a fetch whose every attempt fails at the transport layer makes
/// exactly `max_attempts` attempts, never more, and ends exhausted.
pub proof fn lemma_retry_cap(pool_len: int, max_attempts: int, outcomes: Seq<AttemptOutcome>)
    requires
        pool_len > 0,
        max_attempts > 0,
        outcomes.len() >= max_attempts,
        forall|j: int| 0 <= j < outcomes.len() ==> outcomes[j] == AttemptOutcome::Transport,
    ensures
        spec_fetch_result(pool_len, max_attempts, outcomes) == FetchResult::Failure(
            CustomError::FailedToFetchAfterRetries,
        ),
        spec_attempts_made(pool_len, max_attempts, outcomes) == max_attempts,
    decreases max_attempts,
{
    if max_attempts > 1 {
        let rest = outcomes.drop_first();
        assert(forall|j: int| 0 <= j < rest.len() ==> rest[j] == outcomes[j + 1]);
        lemma_retry_cap(pool_len, max_attempts - 1, rest);
    }
}

/// Law: with an empty proxy pool the fetch fails with
/// `NoProxiesAvailable` before making any attempt, whatever the retry
/// budget and whatever outcomes would have followed.
pub proof fn lemma_empty_pool(max_attempts: int, outcomes: Seq<AttemptOutcome>)
    ensures
        spec_fetch_result(0, max_attempts, outcomes) == FetchResult::Failure(
            CustomError::NoProxiesAvailable,
        ),
        spec_attempts_made(0, max_attempts, outcomes) == 0,
{
}

} // verus!
