//! Retrying failed HTTP requests.
use vstd::prelude::*;

verus! {

/// The amount of times we'll retry the operation.
pub const RETRIES: usize = 10;

/// How one attempt at a request ended.
pub enum Attempt {
    /// The request succeeded.
    Succeeded,
    /// The server answered with an error status code.
    Status(u16),
    /// The request failed otherwise.
    Failed,
}

/// Whether to try a request again after attempt number `attempts` (counted
/// from 1) ended as `outcome`: not after a success, not after status 501
/// (not implemented), and not after the last allowed attempt.
pub open spec fn retry_allowed(attempts: usize, outcome: Attempt) -> bool {
    match outcome {
        Attempt::Succeeded => false,
        Attempt::Status(code) => code != 501 && attempts != RETRIES,
        Attempt::Failed => attempts != RETRIES,
    }
}

pub fn should_retry(attempts: usize, outcome: Attempt) -> (retry: bool)
    ensures
        retry == retry_allowed(attempts, outcome),
{
    match outcome {
        Attempt::Succeeded => false,
        Attempt::Status(code) => code != 501 && attempts != RETRIES,
        Attempt::Failed => attempts != RETRIES,
    }
}

/// Law: starting from attempt 1, a request is tried at most `RETRIES`
/// times: after attempt `RETRIES` no retry is allowed.
pub proof fn lemma_retries_bounded(attempts: usize, outcome: Attempt)
    requires
        attempts >= RETRIES,
        retry_allowed(attempts, outcome),
    ensures
        attempts > RETRIES,
{
}


/// Law: a success is never retried, nor an answer 501 (not implemented);
/// any other failure is retried up to attempt `RETRIES`.
pub proof fn lemma_retry_rules(attempts: usize, code: u16)
    ensures
        !retry_allowed(attempts, Attempt::Succeeded),
        !retry_allowed(attempts, Attempt::Status(501)),
        attempts < RETRIES ==> retry_allowed(attempts, Attempt::Failed),
        attempts < RETRIES && code != 501 ==> retry_allowed(attempts, Attempt::Status(code)),
        attempts == RETRIES ==> !retry_allowed(attempts, Attempt::Failed) && !retry_allowed(
            attempts,
            Attempt::Status(code),
        ),
{
}

} // verus!
