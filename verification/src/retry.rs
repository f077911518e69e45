//! The bounded-retry combinator.
//!
//! Every unreliable operation of the pipeline — a remote fetch or a store
//! insert — is retried up to a fixed bound of attempts, with a linearly
//! increasing backoff between attempts. The retry policy is a pure decision:
//! this module states it once, both as a step function that a driver loop
//! feeds with single outcomes, and as a whole-run function over a sequence of
//! scripted outcomes that pins the number of attempts made.

use vstd::prelude::*;

use crate::database::DbError;

verus! {

/// Bound on the attempts made for one operation.
pub const RETRY_COUNT: u64 = 10;

/// The backoff before the next attempt, in milliseconds, given how many
/// retries remain after the one just consumed. The delay grows linearly as
/// the remaining budget shrinks.
pub fn retry_delay_ms(retries_left: u64) -> (r: u64)
    requires
        retries_left < RETRY_COUNT,
    ensures
        r == (11 - retries_left) * 100,
{
    (11 - retries_left) * 100
}

/// What a driver loop should do after one attempt.
pub enum RetryDecision {
    /// The attempt settled the operation (success or a non-retryable error).
    Settled,
    /// Try again after waiting the given number of milliseconds.
    RetryAfter(u64),
    /// The retry budget is exhausted; surface the last error.
    GiveUp,
}

/// The remaining retry budget of one operation.
pub struct RetryState {
    pub retries_left: u64,
}

impl RetryState {
    /// A fresh budget for one operation.
    pub fn new() -> (r: RetryState)
        ensures
            r.retries_left == RETRY_COUNT,
    {
        RetryState { retries_left: RETRY_COUNT }
    }

    /// Decides what follows one attempt: a retryable failure consumes one
    /// retry and asks for a linearly grown backoff; anything else settles.
    pub fn step(&mut self, failed_transiently: bool) -> (d: RetryDecision)
        requires
            old(self).retries_left <= RETRY_COUNT,
        ensures
            !failed_transiently ==> d is Settled && *final(self) == *old(self),
            failed_transiently && old(self).retries_left > 0 ==> {
                &&& final(self).retries_left == old(self).retries_left - 1
                &&& d == RetryDecision::RetryAfter(((11 - final(self).retries_left) * 100) as u64)
            },
            failed_transiently && old(self).retries_left == 0 ==> d is GiveUp && *final(self)
                == *old(self),
    {
        if !failed_transiently {
            RetryDecision::Settled
        } else if self.retries_left > 0 {
            self.retries_left = self.retries_left - 1;
            RetryDecision::RetryAfter(retry_delay_ms(self.retries_left))
        } else {
            RetryDecision::GiveUp
        }
    }
}

/// Whether one scripted insert outcome is a transient failure — the only
/// kind that is retried. A duplicate-key report settles the operation at
/// once, as a success does.
pub open spec fn is_transient_insert(o: Result<(), DbError>) -> bool {
    o == Result::<(), DbError>::Err(DbError::Transient)
}

/// The first index below `n` at which a scripted run of insert attempts
/// settles, or `None` when the first `n` attempts all fail transiently.
pub open spec fn first_settled(s: Seq<Result<(), DbError>>, n: int) -> Option<int>
    decreases n,
{
    if n <= 0 {
        None
    } else if first_settled(s, n - 1) is Some {
        first_settled(s, n - 1)
    } else if !is_transient_insert(s[n - 1]) {
        Some(n - 1)
    } else {
        None
    }
}

/// Runs one insert against a script of attempt outcomes under the retry
/// policy: the first settling outcome is surfaced after exactly as many
/// attempts as precede it, and a script of nothing but transient failures is
/// abandoned after exactly `RETRY_COUNT` attempts.
pub fn insert_retry(outcomes: &Vec<Result<(), DbError>>) -> (r: (Result<(), DbError>, usize))
    requires
        outcomes@.len() >= RETRY_COUNT,
    ensures
        match first_settled(outcomes@, RETRY_COUNT as int) {
            Some(k) => r.0 == outcomes@[k] && r.1 == k + 1,
            None => r.0 == Result::<(), DbError>::Err(DbError::Transient) && r.1 == RETRY_COUNT,
        },
{
    let mut i: usize = 0;
    while i < RETRY_COUNT as usize
        invariant
            0 <= i <= RETRY_COUNT,
            outcomes@.len() >= RETRY_COUNT,
            first_settled(outcomes@, i as int) is None,
        decreases RETRY_COUNT - i,
    {
        let out = outcomes[i];
        let settled = match out {
            Ok(()) => true,
            Err(DbError::DuplicateEntry) => true,
            Err(DbError::Transient) => false,
        };
        if settled {
            proof {
                assert(first_settled(outcomes@, i as int + 1) == Some(i as int));
                lemma_first_settled_frozen(outcomes@, i as int + 1, RETRY_COUNT as int);
            }
            return (out, i + 1);
        }
        i = i + 1;
    }
    (Err(DbError::Transient), RETRY_COUNT as usize)
}

/// Once a settling index is found, scanning further does not change it.
proof fn lemma_first_settled_frozen(s: Seq<Result<(), DbError>>, m: int, n: int)
    requires
        0 < m <= n,
        first_settled(s, m) is Some,
    ensures
        first_settled(s, n) == first_settled(s, m),
    decreases n - m,
{
    if m < n {
        lemma_first_settled_frozen(s, m, n - 1);
    }
}

/// The deduplicating writer over a script of attempt outcomes: a successful
/// insert reports `Created`, a duplicate-key report collapses to `Exists`
/// without any retry, and only transient failures consume the retry budget.
pub fn insert_with_retry_if_not_present(outcomes: &Vec<Result<(), DbError>>) -> (r: (
    Result<crate::database::CreateOrExist, DbError>,
    usize,
))
    requires
        outcomes@.len() >= RETRY_COUNT,
    ensures
        match first_settled(outcomes@, RETRY_COUNT as int) {
            Some(k) => {
                &&& r.1 == k + 1
                &&& outcomes@[k] == Result::<(), DbError>::Ok(()) ==> r.0 == Result::<
                    crate::database::CreateOrExist,
                    DbError,
                >::Ok(crate::database::CreateOrExist::Created)
                &&& outcomes@[k] == Result::<(), DbError>::Err(DbError::DuplicateEntry) ==> r.0
                    == Result::<crate::database::CreateOrExist, DbError>::Ok(
                    crate::database::CreateOrExist::Exists,
                )
            },
            None => r.0 == Result::<crate::database::CreateOrExist, DbError>::Err(
                DbError::Transient,
            ) && r.1 == RETRY_COUNT,
        },
{
    let (out, attempts) = insert_retry(outcomes);
    let mapped = match out {
        Ok(()) => Ok(crate::database::CreateOrExist::Created),
        Err(DbError::DuplicateEntry) => Ok(crate::database::CreateOrExist::Exists),
        Err(DbError::Transient) => Err(DbError::Transient),
    };
    proof {
        lemma_first_settled_settles(outcomes@, RETRY_COUNT as int);
    }
    (mapped, attempts)
}

/// A settling index indeed holds a non-transient outcome.
proof fn lemma_first_settled_settles(s: Seq<Result<(), DbError>>, n: int)
    ensures
        first_settled(s, n) matches Some(k) ==> 0 <= k < n && !is_transient_insert(s[k]),
    decreases n,
{
    if n > 0 {
        lemma_first_settled_settles(s, n - 1);
    }
}

} // verus!
